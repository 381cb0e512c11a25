//! Boot-entry generation: the build-time collaborator that walks the
//! generation links in ascending version order and writes one
//! boot-manager entry per generation.  The path layout, the ordering and
//! the entry text are computed and verified here; directory creation and
//! file writes stay with the caller.

use vstd::prelude::*;
use vstd::seq_lib::group_to_multiset_ensures;

verus! {

broadcast use group_to_multiset_ensures;

/// One generation link: a numeric version and the link's path.
pub struct GenerationLink {
    pub version: u64,
    pub path: Vec<u8>,
}

pub open spec fn sorted_by_version(s: Seq<GenerationLink>) -> bool {
    forall|i: int, j: int| 0 <= i < j < s.len() ==> s[i].version <= s[j].version
}

/// Orders the generation links by ascending numeric version, keeping
/// exactly the same links: the writer then processes lower versions
/// first.
pub fn sort_links_by_version(links: Vec<GenerationLink>) -> (r: Vec<GenerationLink>)
    ensures
        sorted_by_version(r@),
        r@.to_multiset() == links@.to_multiset(),
        r@.len() == links@.len(),
{
    let mut v = links;
    let ghost all = v@.to_multiset();
    let mut out: Vec<GenerationLink> = Vec::new();
    while v.len() > 0
        invariant
            out@.to_multiset().add(v@.to_multiset()) == all,
            out@.len() + v@.len() == all.len(),
            sorted_by_version(out@),
            forall|i: int, j: int|
                0 <= i < out@.len() && 0 <= j < v@.len() ==> out@[i].version <= v@[j].version,
        decreases v@.len(),
    {
        let mut m: usize = 0;
        let mut idx: usize = 1;
        while idx < v.len()
            invariant
                0 <= m < v@.len(),
                1 <= idx <= v@.len(),
                forall|j: int| 0 <= j < idx ==> v@[m as int].version <= v@[j].version,
            decreases v@.len() - idx,
        {
            if v[idx].version < v[m].version {
                m = idx;
            }
            idx += 1;
        }
        let ghost v_before = v@;
        let ghost out_before = out@;
        let l = v.remove(m);
        out.push(l);
        proof {
            assert(v@.to_multiset() == v_before.to_multiset().remove(v_before[m as int]));
            assert(out@.to_multiset() == out_before.to_multiset().insert(v_before[m as int]));
            assert(out@.to_multiset().add(v@.to_multiset()) =~= all);
            assert forall|i: int, j: int|
                0 <= i < out@.len() && 0 <= j < v@.len() implies out@[i].version
                <= v@[j].version by {
                assert(v@[j] == if j < m { v_before[j] } else { v_before[j + 1] });
            }
            assert(sorted_by_version(out@));
        }
    }
    proof {
        assert(v@.to_multiset().len() == 0);
        assert(out@.to_multiset() =~= all);
    }
    out
}

// ---- entry text ----

/// "title "
pub open spec fn lit_title() -> Seq<u8> {
    seq![0x74u8, 0x69, 0x74, 0x6c, 0x65, 0x20]
}

/// "linux "
pub open spec fn lit_linux() -> Seq<u8> {
    seq![0x6cu8, 0x69, 0x6e, 0x75, 0x78, 0x20]
}

/// "initrd "
pub open spec fn lit_initrd() -> Seq<u8> {
    seq![0x69u8, 0x6e, 0x69, 0x74, 0x72, 0x64, 0x20]
}

/// "options init="
pub open spec fn lit_options_init() -> Seq<u8> {
    seq![0x6fu8, 0x70, 0x74, 0x69, 0x6f, 0x6e, 0x73, 0x20, 0x69, 0x6e, 0x69, 0x74, 0x3d]
}

/// The parts joined with single spaces.
pub open spec fn join_spaced(parts: Seq<Seq<u8>>) -> Seq<u8>
    decreases parts.len(),
{
    if parts.len() == 0 {
        Seq::empty()
    } else if parts.len() == 1 {
        parts[0]
    } else {
        parts[0] + seq![0x20u8] + join_spaced(parts.drop_first())
    }
}

proof fn lemma_join_spaced_push(parts: Seq<Seq<u8>>, p: Seq<u8>)
    ensures
        join_spaced(parts.push(p)) == if parts.len() == 0 {
            p
        } else {
            join_spaced(parts) + seq![0x20u8] + p
        },
    decreases parts.len(),
{
    if parts.len() == 0 {
        assert(parts.push(p)[0] == p);
        assert(parts.push(p).len() == 1);
    } else {
        assert(parts.push(p).drop_first() =~= parts.drop_first().push(p));
        lemma_join_spaced_push(parts.drop_first(), p);
        if parts.len() == 1 {
            assert(join_spaced(parts.push(p)) == parts[0] + seq![0x20u8] + p);
        } else {
            assert(join_spaced(parts) == parts[0] + seq![0x20u8] + join_spaced(
                parts.drop_first(),
            ));
            assert(parts[0] + seq![0x20u8] + (join_spaced(parts.drop_first()) + seq![0x20u8] + p)
                =~= (parts[0] + seq![0x20u8] + join_spaced(parts.drop_first())) + seq![0x20u8]
                + p);
        }
    }
}

/// The exact text of one boot-manager entry:
/// `title …\nlinux …\ninitrd …\noptions init=… ….\n` with the kernel
/// parameters space-joined.
pub open spec fn spec_entry_text(
    title: Seq<u8>,
    linux: Seq<u8>,
    initrd: Seq<u8>,
    init: Seq<u8>,
    params: Seq<Seq<u8>>,
) -> Seq<u8> {
    lit_title() + title + seq![0x0au8] + lit_linux() + linux + seq![0x0au8] + lit_initrd()
        + initrd + seq![0x0au8] + lit_options_init() + init + seq![0x20u8] + join_spaced(params)
        + seq![0x0au8]
}

fn append_bytes(out: &mut Vec<u8>, s: &[u8])
    ensures
        final(out)@ == old(out)@ + s@,
{
    let mut i: usize = 0;
    let n = s.len();
    while i < n
        invariant
            0 <= i <= n,
            n == s@.len(),
            out@ == old(out)@ + s@.take(i as int),
        decreases n - i,
    {
        out.push(s[i]);
        proof {
            assert(old(out)@ + s@.take(i as int + 1) =~= (old(out)@ + s@.take(i as int)).push(
                s@[i as int],
            ));
        }
        i += 1;
    }
    proof {
        assert(s@.take(n as int) =~= s@);
    }
}

/// Produces one entry's bytes, exactly as `spec_entry_text` says.
#[verifier::loop_isolation(false)]
pub fn generation_entry_text(
    title: &[u8],
    linux: &[u8],
    initrd: &[u8],
    init: &[u8],
    params: &Vec<Vec<u8>>,
) -> (r: Vec<u8>)
    ensures
        r@ == spec_entry_text(
            title@,
            linux@,
            initrd@,
            init@,
            params@.map_values(|p: Vec<u8>| p@),
        ),
{
    let mut out: Vec<u8> = Vec::new();
    let t_title = [0x74u8, 0x69, 0x74, 0x6c, 0x65, 0x20];
    let t_linux = [0x6cu8, 0x69, 0x6e, 0x75, 0x78, 0x20];
    let t_initrd = [0x69u8, 0x6e, 0x69, 0x74, 0x72, 0x64, 0x20];
    let t_options = [
        0x6fu8,
        0x70,
        0x74,
        0x69,
        0x6f,
        0x6e,
        0x73,
        0x20,
        0x69,
        0x6e,
        0x69,
        0x74,
        0x3d,
    ];
    let nl = [0x0au8];
    let sp = [0x20u8];
    proof {
        assert(t_title@ =~= lit_title());
        assert(t_linux@ =~= lit_linux());
        assert(t_initrd@ =~= lit_initrd());
        assert(t_options@ =~= lit_options_init());
        assert(nl@ =~= seq![0x0au8]);
        assert(sp@ =~= seq![0x20u8]);
    }
    append_bytes(&mut out, t_title.as_slice());
    append_bytes(&mut out, title);
    append_bytes(&mut out, nl.as_slice());
    append_bytes(&mut out, t_linux.as_slice());
    append_bytes(&mut out, linux);
    append_bytes(&mut out, nl.as_slice());
    append_bytes(&mut out, t_initrd.as_slice());
    append_bytes(&mut out, initrd);
    append_bytes(&mut out, nl.as_slice());
    append_bytes(&mut out, t_options.as_slice());
    append_bytes(&mut out, init);
    append_bytes(&mut out, sp.as_slice());
    let ghost pviews = params@.map_values(|p: Vec<u8>| p@);
    let ghost head = out@;
    let n = params.len();
    let mut i: usize = 0;
    while i < n
        invariant
            0 <= i <= n,
            n == params@.len(),
            out@ == head + join_spaced(pviews.take(i as int)),
        decreases n - i,
    {
        if i > 0 {
            append_bytes(&mut out, sp.as_slice());
        }
        append_bytes(&mut out, params[i].as_slice());
        proof {
            assert(pviews.take(i as int).push(pviews[i as int]) =~= pviews.take(i as int + 1));
            lemma_join_spaced_push(pviews.take(i as int), pviews[i as int]);
            if i > 0 {
                assert((head + join_spaced(pviews.take(i as int)) + sp@) + params@[i as int]@
                    =~= head + (join_spaced(pviews.take(i as int)) + seq![0x20u8]
                    + pviews[i as int]));
            } else {
                assert(head + Seq::<u8>::empty() =~= head);
                assert(head + join_spaced(pviews.take(0int)) + params@[0int]@ =~= head
                    + pviews[0int]);
            }
        }
        i += 1;
    }
    append_bytes(&mut out, nl.as_slice());
    proof {
        assert(pviews.take(n as int) =~= pviews);
        assert(out@ =~= spec_entry_text(title@, linux@, initrd@, init@, pviews));
    }
    out
}

// ---- ESP path layout ----

/// "/EFI"
pub open spec fn lit_efi() -> Seq<u8> {
    seq![0x2fu8, 0x45, 0x46, 0x49]
}

/// "/EFI/nixos"
pub open spec fn lit_nixos() -> Seq<u8> {
    seq![0x2fu8, 0x45, 0x46, 0x49, 0x2f, 0x6e, 0x69, 0x78, 0x6f, 0x73]
}

/// "/EFI/Linux"
pub open spec fn lit_linux_dir() -> Seq<u8> {
    seq![0x2fu8, 0x45, 0x46, 0x49, 0x2f, 0x4c, 0x69, 0x6e, 0x75, 0x78]
}

/// "/loader"
pub open spec fn lit_loader() -> Seq<u8> {
    seq![0x2fu8, 0x6c, 0x6f, 0x61, 0x64, 0x65, 0x72]
}

/// "/loader/entries"
pub open spec fn lit_loader_entries() -> Seq<u8> {
    seq![0x2fu8, 0x6c, 0x6f, 0x61, 0x64, 0x65, 0x72, 0x2f, 0x65, 0x6e, 0x74, 0x72, 0x69, 0x65, 0x73]
}

/// "/loader/loader.conf"
pub open spec fn lit_loader_conf() -> Seq<u8> {
    seq![
        0x2fu8,
        0x6c,
        0x6f,
        0x61,
        0x64,
        0x65,
        0x72,
        0x2f,
        0x6c,
        0x6f,
        0x61,
        0x64,
        0x65,
        0x72,
        0x2e,
        0x63,
        0x6f,
        0x6e,
        0x66,
    ]
}

/// The fixed locations inside one ESP-like tree.
pub struct EspPaths {
    pub esp: Vec<u8>,
    pub efi: Vec<u8>,
    pub nixos: Vec<u8>,
    pub linux: Vec<u8>,
    pub loader: Vec<u8>,
    pub loader_entries: Vec<u8>,
    pub systemd_boot_loader_config: Vec<u8>,
}

/// Every field of `p` is the fixed location under the tree root `root`.
pub open spec fn esp_paths_match(p: &EspPaths, root: Seq<u8>) -> bool {
    &&& p.esp@ == root
    &&& p.efi@ == root + lit_efi()
    &&& p.nixos@ == root + lit_nixos()
    &&& p.linux@ == root + lit_linux_dir()
    &&& p.loader@ == root + lit_loader()
    &&& p.loader_entries@ == root + lit_loader_entries()
    &&& p.systemd_boot_loader_config@ == root + lit_loader_conf()
}

fn concat_bytes(a: &[u8], b: &[u8]) -> (r: Vec<u8>)
    ensures
        r@ == a@ + b@,
{
    let mut out: Vec<u8> = Vec::new();
    append_bytes(&mut out, a);
    append_bytes(&mut out, b);
    proof {
        assert(Seq::<u8>::empty() + a@ =~= a@);
    }
    out
}

impl EspPaths {
    /// Derives every fixed location from the tree root.
    pub fn new(esp: Vec<u8>) -> (r: EspPaths)
        ensures
            esp_paths_match(&r, esp@),
    {
        let t_efi = [0x2fu8, 0x45, 0x46, 0x49];
        let t_nixos = [0x2fu8, 0x45, 0x46, 0x49, 0x2f, 0x6e, 0x69, 0x78, 0x6f, 0x73];
        let t_linux = [0x2fu8, 0x45, 0x46, 0x49, 0x2f, 0x4c, 0x69, 0x6e, 0x75, 0x78];
        let t_loader = [0x2fu8, 0x6c, 0x6f, 0x61, 0x64, 0x65, 0x72];
        let t_entries = [
            0x2fu8,
            0x6c,
            0x6f,
            0x61,
            0x64,
            0x65,
            0x72,
            0x2f,
            0x65,
            0x6e,
            0x74,
            0x72,
            0x69,
            0x65,
            0x73,
        ];
        let t_conf = [
            0x2fu8,
            0x6c,
            0x6f,
            0x61,
            0x64,
            0x65,
            0x72,
            0x2f,
            0x6c,
            0x6f,
            0x61,
            0x64,
            0x65,
            0x72,
            0x2e,
            0x63,
            0x6f,
            0x6e,
            0x66,
        ];
        proof {
            assert(t_efi@ =~= lit_efi());
            assert(t_nixos@ =~= lit_nixos());
            assert(t_linux@ =~= lit_linux_dir());
            assert(t_loader@ =~= lit_loader());
            assert(t_entries@ =~= lit_loader_entries());
            assert(t_conf@ =~= lit_loader_conf());
        }
        let efi = concat_bytes(esp.as_slice(), t_efi.as_slice());
        let nixos = concat_bytes(esp.as_slice(), t_nixos.as_slice());
        let linux = concat_bytes(esp.as_slice(), t_linux.as_slice());
        let loader = concat_bytes(esp.as_slice(), t_loader.as_slice());
        let loader_entries = concat_bytes(esp.as_slice(), t_entries.as_slice());
        let systemd_boot_loader_config = concat_bytes(esp.as_slice(), t_conf.as_slice());
        EspPaths { esp, efi, nixos, linux, loader, loader_entries, systemd_boot_loader_config }
    }
}

/// The boot-entry writer: where the systemd-boot config comes from, the
/// two ESP-like trees it works on, and the generation links to process.
pub struct LoaderEntries {
    pub systemd_boot_loader_config: Vec<u8>,
    pub esp_paths: EspPaths,
    pub ble_paths: EspPaths,
    pub generation_links: Vec<Vec<u8>>,
}

impl LoaderEntries {
    /// Captures the inputs and derives both path layouts.
    pub fn new(
        systemd_boot_loader_config: Vec<u8>,
        esp: Vec<u8>,
        boot_loader_entries: Vec<u8>,
        generation_links: Vec<Vec<u8>>,
    ) -> (r: LoaderEntries)
        ensures
            r.systemd_boot_loader_config@ == systemd_boot_loader_config@,
            esp_paths_match(&r.esp_paths, esp@),
            esp_paths_match(&r.ble_paths, boot_loader_entries@),
            r.generation_links == generation_links,
    {
        let esp_paths = EspPaths::new(esp);
        let ble_paths = EspPaths::new(boot_loader_entries);
        LoaderEntries { systemd_boot_loader_config, esp_paths, ble_paths, generation_links }
    }
}

} // verus!
