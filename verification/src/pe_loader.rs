//! PE Image Loader: parses a kernel PE32+ buffer, lays the sections out in
//! a zero-initialized virtual image, and applies base relocations for the
//! address the platform actually allocated.  The jump into the loaded code
//! is not here: it is inherently unverifiable and stays with the caller.

use vstd::prelude::*;
use vstd::wrapping::u64_specs;

use crate::bytes::{
    le16, le32, le64, read_u16, read_u32, read_u64, splice, u64_le_bytes, write_u64_at,
};
use crate::pe::{
    headers_wf, machine, n_sections, opt_header_size, opt_off, parse_headers, sect_rptr,
    sect_rsize, sect_va, sect_vsize, PeHeaders,
};
use crate::BootError;

verus! {

// ---- optional-header fields (PE32+ layout) ----

pub open spec fn entry_rva(b: Seq<u8>) -> int {
    le32(b, opt_off(b) + 16)
}

pub open spec fn image_base(b: Seq<u8>) -> int {
    le64(b, opt_off(b) + 24)
}

pub open spec fn image_size(b: Seq<u8>) -> int {
    le32(b, opt_off(b) + 56)
}

pub open spec fn n_data_dirs(b: Seq<u8>) -> int {
    le32(b, opt_off(b) + 108)
}

/// Base-relocation data directory (index 5).
pub open spec fn reloc_rva(b: Seq<u8>) -> int {
    le32(b, opt_off(b) + 152)
}

pub open spec fn reloc_size(b: Seq<u8>) -> int {
    le32(b, opt_off(b) + 156)
}

pub open spec fn reloc_present(b: Seq<u8>) -> bool {
    n_data_dirs(b) >= 6 && reloc_size(b) > 0
}

/// Bytes of section `k` that come from the file: raw data, capped at the
/// virtual size.  Whatever the virtual range holds beyond this stays zero.
pub open spec fn copy_len(b: Seq<u8>, k: int) -> int {
    if sect_rsize(b, k) <= sect_vsize(b, k) {
        sect_rsize(b, k)
    } else {
        sect_vsize(b, k)
    }
}

pub open spec fn section_fits(b: Seq<u8>, k: int) -> bool {
    &&& sect_rptr(b, k) + copy_len(b, k) <= b.len()
    &&& sect_va(b, k) + sect_vsize(b, k) <= image_size(b)
}

/// The images this loader accepts: an x86-64 PE32+ whose sections lie
/// inside the file and the declared virtual footprint, with ascending,
/// non-overlapping virtual ranges, and whose relocation directory entry is
/// readable whenever one is declared.
pub open spec fn loader_wf(b: Seq<u8>) -> bool {
    &&& headers_wf(b)
    &&& machine(b) == 0x8664
    &&& opt_header_size(b) >= 112
    &&& le16(b, opt_off(b)) == 0x20b
    &&& entry_rva(b) < image_size(b)
    &&& (n_data_dirs(b) >= 6 ==> opt_header_size(b) >= 160)
    &&& (reloc_present(b) ==> reloc_rva(b) + reloc_size(b) <= image_size(b))
    &&& (forall|k: int| 0 <= k < n_sections(b) ==> section_fits(b, k))
    &&& (forall|k: int|
        0 <= k < n_sections(b) - 1 ==> sect_va(b, k) + sect_vsize(b, k) <= sect_va(b, k + 1))
}

// ---- the mapped (pre-relocation) image ----

pub open spec fn raw_bytes(b: Seq<u8>, k: int) -> Seq<u8> {
    b.subrange(sect_rptr(b, k), sect_rptr(b, k) + copy_len(b, k))
}

pub open spec fn zero_image(b: Seq<u8>) -> Seq<u8> {
    Seq::new(image_size(b) as nat, |i: int| 0u8)
}

/// The virtual image after the first `k` sections are copied in.
pub open spec fn copy_upto(b: Seq<u8>, k: int) -> Seq<u8>
    decreases k,
{
    if k <= 0 {
        zero_image(b)
    } else {
        splice(copy_upto(b, k - 1), sect_va(b, k - 1), raw_bytes(b, k - 1))
    }
}

/// Zero-initialized virtual footprint with every section's raw bytes at its
/// virtual address.
pub open spec fn mapped_image(b: Seq<u8>) -> Seq<u8> {
    copy_upto(b, n_sections(b))
}

// ---- base relocations ----

/// Targets of one relocation block: `cnt` 16-bit entries at `q`; type 0 is
/// padding, type 10 (DIR64) relocates the eight bytes at `page + offset`,
/// anything else is malformed.
pub open spec fn block_targets(m: Seq<u8>, q: int, cnt: nat, page: int) -> Option<Seq<int>>
    decreases cnt,
{
    if cnt == 0 {
        Some(Seq::<int>::empty())
    } else {
        let e = le16(m, q);
        let ty = e / 0x1000;
        let off = e % 0x1000;
        if ty == 0 {
            block_targets(m, q + 2, (cnt - 1) as nat, page)
        } else if ty == 10 {
            match block_targets(m, q + 2, (cnt - 1) as nat, page) {
                None => None,
                Some(rest) => Some(seq![page + off] + rest),
            }
        } else {
            None
        }
    }
}

/// Walks the relocation blocks between `p` and `end` inside the mapped
/// image and concatenates their targets.
pub open spec fn walk_blocks(m: Seq<u8>, p: int, end: int) -> Option<Seq<int>>
    decreases end - p,
{
    if p >= end {
        if p == end {
            Some(Seq::<int>::empty())
        } else {
            None
        }
    } else if p + 8 > end {
        None
    } else {
        let page = le32(m, p);
        let bsize = le32(m, p + 4);
        if bsize < 8 || (bsize - 8) % 2 != 0 || p + bsize > end {
            None
        } else {
            match block_targets(m, p + 8, ((bsize - 8) / 2) as nat, page) {
                None => None,
                Some(ts) => match walk_blocks(m, p + bsize, end) {
                    None => None,
                    Some(rest) => Some(ts + rest),
                },
            }
        }
    }
}

/// All relocation targets of the image, read from the mapped image; an
/// image without a relocation directory has none.
pub open spec fn reloc_targets(b: Seq<u8>) -> Option<Seq<int>> {
    if !reloc_present(b) {
        Some(Seq::<int>::empty())
    } else {
        walk_blocks(mapped_image(b), reloc_rva(b), reloc_rva(b) + reloc_size(b))
    }
}

pub open spec fn targets_ok(ts: Seq<int>, size: int) -> bool {
    forall|i: int| 0 <= i < ts.len() ==> 0 <= #[trigger] ts[i] && ts[i] + 8 <= size
}

/// One DIR64 relocation: the eight bytes at `t` get `delta` added, mod 2^64.
pub open spec fn apply_one(m: Seq<u8>, t: int, delta: u64) -> Seq<u8> {
    splice(m, t, u64_le_bytes(u64_specs::wrapping_add(le64(m, t) as u64, delta)))
}

pub open spec fn apply_targets(m: Seq<u8>, ts: Seq<int>, delta: u64) -> Seq<u8>
    decreases ts.len(),
{
    if ts.len() == 0 {
        m
    } else {
        apply_targets(apply_one(m, ts[0], delta), ts.drop_first(), delta)
    }
}

/// Difference between the allocated and the preferred base, as the 64-bit
/// wrapping quantity every DIR64 target gets shifted by.
pub open spec fn load_delta(b: Seq<u8>, base: u64) -> u64 {
    u64_specs::wrapping_sub(base, image_base(b) as u64)
}

/// Everything `load` demands of a buffer and an allocation base.
pub open spec fn load_ok(b: Seq<u8>, base: u64) -> bool {
    &&& loader_wf(b)
    &&& reloc_targets(b) is Some
    &&& targets_ok(reloc_targets(b)->0, image_size(b))
    &&& (load_delta(b, base) != 0 ==> reloc_present(b))
    &&& base + image_size(b) <= u64::MAX
}

/// The final in-memory image for an allocation at `base`.
pub open spec fn loaded_mem(b: Seq<u8>, base: u64) -> Seq<u8> {
    if load_delta(b, base) == 0 {
        mapped_image(b)
    } else {
        apply_targets(mapped_image(b), reloc_targets(b)->0, load_delta(b, base))
    }
}

/// A parsed, mapped, relocated PE64 image, ready to run at `base`.
#[derive(Debug)]
pub struct Image {
    /// The relocated image bytes; the caller places them at `base`.
    pub mem: Vec<u8>,
    /// The address the image was relocated for.
    pub base: u64,
    /// Absolute entry-point address.
    pub entry: u64,
}

struct LoadInfo {
    n_sections: usize,
    sect_table_off: usize,
    entry_rva: u32,
    image_base: u64,
    image_size: u32,
    reloc_present: bool,
    reloc_rva: u32,
    reloc_size: u32,
}

/// Header and section-table validation; succeeds exactly on `loader_wf`.
#[verifier::loop_isolation(false)]
fn validate(b: &[u8]) -> (r: Option<LoadInfo>)
    ensures
        r is Some <==> loader_wf(b@),
        r is Some ==> {
            let i = r->0;
            &&& i.n_sections as int == n_sections(b@)
            &&& i.sect_table_off as int == crate::pe::sect_table_off(b@)
            &&& i.entry_rva as int == entry_rva(b@)
            &&& i.image_base as int == image_base(b@)
            &&& i.image_size as int == image_size(b@)
            &&& i.reloc_present == reloc_present(b@)
            &&& (i.reloc_present ==> i.reloc_rva as int == reloc_rva(b@))
            &&& (i.reloc_present ==> i.reloc_size as int == reloc_size(b@))
        },
{
    let len = b.len();
    let h: PeHeaders = match parse_headers(b) {
        None => {
            return None;
        },
        Some(h) => h,
    };
    if read_u16(b, h.coff_off) != 0x8664 {
        return None;
    }
    if h.opt_header_size < 112 {
        return None;
    }
    if read_u16(b, h.opt_off) != 0x20b {
        return None;
    }
    let entry = read_u32(b, h.opt_off + 16);
    let base = read_u64(b, h.opt_off + 24);
    let size = read_u32(b, h.opt_off + 56);
    if entry >= size {
        return None;
    }
    let ndirs = read_u32(b, h.opt_off + 108);
    let mut rrva: u32 = 0;
    let mut rsize: u32 = 0;
    if ndirs >= 6 {
        if h.opt_header_size < 160 {
            return None;
        }
        rrva = read_u32(b, h.opt_off + 152);
        rsize = read_u32(b, h.opt_off + 156);
        if rsize > 0 {
            if rrva as u64 + rsize as u64 > size as u64 {
                return None;
            }
        }
    }
    let present = ndirs >= 6 && rsize > 0;
    let mut k: usize = 0;
    let mut prev_end: u64 = 0;
    while k < h.n_sections
        invariant
            0 <= k <= h.n_sections,
            forall|j: int| 0 <= j < k ==> section_fits(b@, j),
            forall|j: int|
                0 <= j < k - 1 ==> sect_va(b@, j) + sect_vsize(b@, j) <= sect_va(b@, j + 1),
            k > 0 ==> prev_end as int == sect_va(b@, k - 1) + sect_vsize(b@, k - 1),
        decreases h.n_sections - k,
    {
        let off = h.sect_table_off + 40 * k;
        let vsize = read_u32(b, off + 8);
        let va = read_u32(b, off + 12);
        let rsz = read_u32(b, off + 16);
        let rptr = read_u32(b, off + 20);
        let clen: u32 = if rsz <= vsize {
            rsz
        } else {
            vsize
        };
        if rptr as u64 + clen as u64 > len as u64 {
            proof {
                assert(!section_fits(b@, k as int));
            }
            return None;
        }
        if va as u64 + vsize as u64 > size as u64 {
            proof {
                assert(!section_fits(b@, k as int));
            }
            return None;
        }
        if k > 0 {
            if (va as u64) < prev_end {
                proof {
                    assert(!(sect_va(b@, k - 1) + sect_vsize(b@, k - 1) <= sect_va(b@, k as int)));
                }
                return None;
            }
        }
        prev_end = va as u64 + vsize as u64;
        k += 1;
    }
    Some(
        LoadInfo {
            n_sections: h.n_sections,
            sect_table_off: h.sect_table_off,
            entry_rva: entry,
            image_base: base,
            image_size: size,
            reloc_present: present,
            reloc_rva: rrva,
            reloc_size: rsize,
        },
    )
}

/// Builds the zero-initialized footprint and copies every section in.
#[verifier::loop_isolation(false)]
fn map_sections(b: &[u8], info: &LoadInfo) -> (r: Vec<u8>)
    requires
        loader_wf(b@),
        info.n_sections as int == n_sections(b@),
        info.sect_table_off as int == crate::pe::sect_table_off(b@),
        info.image_size as int == image_size(b@),
    ensures
        r@ == mapped_image(b@),
        r@.len() == image_size(b@),
{
    let len = b.len();
    proof {
        assert(crate::pe::sect_table_off(b@) + 40 * n_sections(b@) <= len);
    }
    let mut mem: Vec<u8> = vec![0u8; info.image_size as usize];
    proof {
        assert(mem@ =~= copy_upto(b@, 0));
    }
    let mut k: usize = 0;
    while k < info.n_sections
        invariant
            0 <= k <= info.n_sections,
            mem@ == copy_upto(b@, k as int),
            mem@.len() == image_size(b@),
        decreases info.n_sections - k,
    {
        let off = info.sect_table_off + 40 * k;
        let vsize = read_u32(b, off + 8);
        let va = read_u32(b, off + 12) as usize;
        let rsz = read_u32(b, off + 16);
        let rptr = read_u32(b, off + 20) as usize;
        let clen: usize = if rsz <= vsize {
            rsz as usize
        } else {
            vsize as usize
        };
        assert(section_fits(b@, k as int));
        let ghost m_prev = mem@;
        let mut j: usize = 0;
        while j < clen
            invariant
                0 <= j <= clen,
                clen == copy_len(b@, k as int),
                va as int == sect_va(b@, k as int),
                rptr as int == sect_rptr(b@, k as int),
                section_fits(b@, k as int),
                0 <= k < n_sections(b@),
                mem@.len() == image_size(b@),
                mem@ == splice(m_prev, va as int, raw_bytes(b@, k as int).take(j as int)),
                m_prev == copy_upto(b@, k as int),
                m_prev.len() == image_size(b@),
            decreases clen - j,
        {
            mem[va + j] = b[rptr + j];
            proof {
                assert(raw_bytes(b@, k as int)[j as int] == b@[rptr + j]);
                assert(mem@ =~= splice(
                    m_prev,
                    va as int,
                    raw_bytes(b@, k as int).take(j as int + 1),
                ));
            }
            j += 1;
        }
        proof {
            assert(raw_bytes(b@, k as int).take(clen as int) =~= raw_bytes(b@, k as int));
            assert(mem@ =~= splice(m_prev, va as int, raw_bytes(b@, k as int)));
            assert(mem@ == copy_upto(b@, k + 1));
        }
        k += 1;
    }
    mem
}

/// `copy_upto` never changes the length: it is always the virtual footprint.
pub proof fn lemma_copy_upto_len(b: Seq<u8>, k: int)
    ensures
        copy_upto(b, k).len() == image_size(b),
    decreases k,
{
    if k > 0 {
        lemma_copy_upto_len(b, k - 1);
    }
}

proof fn lemma_apply_targets_len(m: Seq<u8>, ts: Seq<int>, delta: u64)
    ensures
        apply_targets(m, ts, delta).len() == m.len(),
    decreases ts.len(),
{
    if ts.len() > 0 {
        lemma_apply_targets_len(apply_one(m, ts[0], delta), ts.drop_first(), delta);
    }
}

proof fn lemma_apply_targets_push(m: Seq<u8>, ts: Seq<int>, t: int, delta: u64)
    ensures
        apply_targets(m, ts.push(t), delta) == apply_one(apply_targets(m, ts, delta), t, delta),
    decreases ts.len(),
{
    if ts.len() == 0 {
        assert(ts.push(t).drop_first() =~= Seq::<int>::empty());
        assert(apply_targets(m, ts.push(t), delta) == apply_targets(
            apply_one(m, t, delta),
            Seq::<int>::empty(),
            delta,
        ));
    } else {
        assert(ts.push(t).drop_first() =~= ts.drop_first().push(t));
        assert(ts.push(t)[0] == ts[0]);
        lemma_apply_targets_push(apply_one(m, ts[0], delta), ts.drop_first(), t, delta);
    }
}

/// Collects every relocation target between `p0` and `end`, or fails
/// exactly when the blocks are malformed or a target escapes the image.
#[verifier::loop_isolation(false)]
fn collect_targets(mem: &Vec<u8>, p0: usize, end: usize) -> (r: Option<Vec<usize>>)
    requires
        p0 <= end <= mem@.len(),
    ensures
        r is Some <==> (walk_blocks(mem@, p0 as int, end as int) is Some && targets_ok(
            walk_blocks(mem@, p0 as int, end as int)->0,
            mem@.len() as int,
        )),
        r is Some ==> walk_blocks(mem@, p0 as int, end as int)->0 == r->0@.map_values(
            |t: usize| t as int,
        ),
{
    let size = mem.len();
    let mut targets: Vec<usize> = Vec::new();
    let mut p: usize = p0;
    while p < end
        invariant
            p0 <= p <= end,
            walk_blocks(mem@, p0 as int, end as int) is Some <==> walk_blocks(
                mem@,
                p as int,
                end as int,
            ) is Some,
            walk_blocks(mem@, p0 as int, end as int) is Some ==> walk_blocks(
                mem@,
                p0 as int,
                end as int,
            )->0 == targets@.map_values(|t: usize| t as int) + walk_blocks(
                mem@,
                p as int,
                end as int,
            )->0,
            targets_ok(targets@.map_values(|t: usize| t as int), size as int),
        decreases end - p,
    {
        if end - p < 8 {
            return None;
        }
        let page = read_u32(mem.as_slice(), p);
        let bsize = read_u32(mem.as_slice(), p + 4) as usize;
        if bsize < 8 || (bsize - 8) % 2 != 0 || bsize > end - p {
            return None;
        }
        let cnt = (bsize - 8) / 2;
        let ghost bs = p + 8int;
        let ghost t0 = targets@;
        let mut i: usize = 0;
        let mut q: usize = p + 8;
        while i < cnt
            invariant
                0 <= i <= cnt,
                q == p + 8 + 2 * i,
                q + 2 * (cnt - i) == p + bsize,
                t0.len() <= targets@.len(),
                targets@.take(t0.len() as int) == t0,
                targets_ok(targets@.map_values(|t: usize| t as int), size as int),
                block_targets(mem@, bs, cnt as nat, page as int) is Some <==> block_targets(
                    mem@,
                    q as int,
                    (cnt - i) as nat,
                    page as int,
                ) is Some,
                block_targets(mem@, bs, cnt as nat, page as int) is Some ==> block_targets(
                    mem@,
                    bs,
                    cnt as nat,
                    page as int,
                )->0 == targets@.map_values(|t: usize| t as int).skip(t0.len() as int)
                    + block_targets(mem@, q as int, (cnt - i) as nat, page as int)->0,
            decreases cnt - i,
        {
            let e = read_u16(mem.as_slice(), q);
            let ty = e / 0x1000;
            let off = e % 0x1000;
            if ty == 0 {
                // padding entry
            } else if ty == 10 {
                let t64 = page as u64 + off as u64;
                if t64 + 8 > size as u64 {
                    // the target escapes the image: if the table parses at
                    // all, this target is in it, so the image is refused
                    proof {
                        let full = walk_blocks(mem@, p0 as int, end as int);
                        if full is Some {
                            let sofar = targets@.map_values(|t: usize| t as int);
                            let bt_q = block_targets(
                                mem@,
                                q as int,
                                (cnt - i) as nat,
                                page as int,
                            );
                            if bt_q is Some {
                                assert(bt_q->0[0] == page + off);
                                let bt_full = block_targets(mem@, bs, cnt as nat, page as int);
                                assert(bt_full->0[sofar.len() - t0.len()] == page + off);
                                assert(walk_blocks(mem@, p as int, end as int)->0[sofar.len()
                                    - t0.len()] == page + off);
                                assert(full->0[sofar.len() as int] == page + off);
                                assert(!targets_ok(full->0, mem@.len() as int));
                            } else {
                                assert(walk_blocks(mem@, p as int, end as int) is None);
                            }
                        }
                    }
                    return None;
                }
                let t = t64 as usize;
                let ghost targets_before = targets@;
                targets.push(t);
                proof {
                    assert(targets@.take(t0.len() as int) =~= t0);
                    assert(targets@.map_values(|x: usize| x as int) =~= targets_before.map_values(
                        |x: usize| x as int,
                    ).push(t as int));
                    assert(targets@.map_values(|x: usize| x as int).skip(t0.len() as int)
                        =~= targets_before.map_values(|x: usize| x as int).skip(
                        t0.len() as int,
                    ).push(t as int));
                    if block_targets(mem@, bs, cnt as nat, page as int) is Some {
                        let rest = block_targets(
                            mem@,
                            q as int + 2,
                            (cnt - i - 1) as nat,
                            page as int,
                        );
                        assert(block_targets(mem@, q as int, (cnt - i) as nat, page as int)->0
                            =~= seq![page as int + off] + rest->0);
                        assert(targets_before.map_values(|x: usize| x as int).skip(
                            t0.len() as int,
                        ).push(t as int) + rest->0 =~= targets_before.map_values(
                            |x: usize| x as int,
                        ).skip(t0.len() as int) + (seq![page as int + off] + rest->0));
                    }
                }
            } else {
                // unsupported relocation type
                proof {
                    assert(block_targets(mem@, q as int, (cnt - i) as nat, page as int) is None);
                }
                return None;
            }
            i += 1;
            q += 2;
        }
        proof {
            assert(block_targets(mem@, q as int, 0nat, page as int) == Some(Seq::<int>::empty()));
            let bt_full = block_targets(mem@, bs, cnt as nat, page as int);
            assert(bt_full is Some);
            assert(bt_full->0 =~= targets@.map_values(|t: usize| t as int).skip(t0.len() as int));
            // one unfolding of walk_blocks at p
            assert(walk_blocks(mem@, p as int, end as int) is Some <==> walk_blocks(
                mem@,
                p as int + bsize,
                end as int,
            ) is Some);
            if walk_blocks(mem@, p0 as int, end as int) is Some {
                assert(walk_blocks(mem@, p as int, end as int)->0 == bt_full->0 + walk_blocks(
                    mem@,
                    p as int + bsize,
                    end as int,
                )->0);
                assert(t0.map_values(|t: usize| t as int) + (bt_full->0 + walk_blocks(
                    mem@,
                    p as int + bsize,
                    end as int,
                )->0) =~= targets@.map_values(|t: usize| t as int) + walk_blocks(
                    mem@,
                    p as int + bsize,
                    end as int,
                )->0);
                assert(t0 =~= targets@.take(t0.len() as int));
                assert(t0.map_values(|t: usize| t as int) + targets@.map_values(
                    |t: usize| t as int,
                ).skip(t0.len() as int) =~= targets@.map_values(|t: usize| t as int));
            }
        }
        p += bsize;
    }
    Some(targets)
}

/// Adds `delta` to the eight bytes at every target, in order.
#[verifier::loop_isolation(false)]
fn apply_relocations(mem: &mut Vec<u8>, targets: &Vec<usize>, delta: u64)
    requires
        targets_ok(targets@.map_values(|t: usize| t as int), old(mem)@.len() as int),
        old(mem)@.len() <= usize::MAX,
    ensures
        final(mem)@ == apply_targets(
            old(mem)@,
            targets@.map_values(|t: usize| t as int),
            delta,
        ),
{
    let ghost ts = targets@.map_values(|t: usize| t as int);
    let n = targets.len();
    let mut i: usize = 0;
    while i < n
        invariant
            0 <= i <= n,
            n == targets@.len(),
            mem@ == apply_targets(old(mem)@, ts.take(i as int), delta),
            mem@.len() == old(mem)@.len(),
        decreases n - i,
    {
        let t = targets[i];
        proof {
            assert(ts[i as int] == t as int);
            lemma_apply_targets_len(old(mem)@, ts.take(i as int), delta);
        }
        let v = read_u64(mem.as_slice(), t);
        let v2 = v.wrapping_add(delta);
        let ghost before = mem@;
        write_u64_at(mem, t, v2);
        proof {
            assert(mem@ == apply_one(before, t as int, delta));
            assert(ts.take(i as int).push(t as int) =~= ts.take(i as int + 1));
            lemma_apply_targets_push(old(mem)@, ts.take(i as int), t as int, delta);
        }
        i += 1;
    }
    proof {
        assert(ts.take(n as int) =~= ts);
    }
}

/// The size of the contiguous region a caller must allocate before it can
/// ask for the image to be built: the declared virtual footprint.
pub fn image_footprint(b: &[u8]) -> (r: Option<u64>)
    ensures
        r is Some <==> loader_wf(b@),
        r is Some ==> r->0 as int == image_size(b@),
{
    match validate(b) {
        None => None,
        Some(info) => Some(info.image_size as u64),
    }
}

impl Image {
    /// Parses, maps and relocates `b` for an allocation at `base`.
    ///
    /// Succeeds exactly on `load_ok`; then `mem` is the image bytes the
    /// caller must place at `base`, and `entry` the absolute entry point.
    /// Every malformed-image condition is the one load-error kind.
    pub fn load(b: &[u8], base: u64) -> (r: Result<Image, BootError>)
        ensures
            r is Ok <==> load_ok(b@, base),
            r is Ok ==> r->Ok_0.mem@ == loaded_mem(b@, base),
            r is Ok ==> r->Ok_0.mem@.len() == image_size(b@),
            r is Ok ==> r->Ok_0.base == base,
            r is Ok ==> r->Ok_0.entry as int == base + entry_rva(b@),
            r is Err ==> r->Err_0 == BootError::LoadError,
    {
        let info = match validate(b) {
            None => {
                return Err(BootError::LoadError);
            },
            Some(i) => i,
        };
        match base.checked_add(info.image_size as u64) {
            None => {
                return Err(BootError::LoadError);
            },
            Some(_) => {},
        }
        let mut mem = map_sections(b, &info);
        let delta = base.wrapping_sub(info.image_base);
        let targets: Vec<usize> = if info.reloc_present {
            let start = info.reloc_rva as usize;
            let len = info.reloc_size as usize;
            match collect_targets(&mem, start, start + len) {
                None => {
                    return Err(BootError::LoadError);
                },
                Some(ts) => ts,
            }
        } else {
            if delta != 0 {
                return Err(BootError::LoadError);
            }
            Vec::new()
        };
        proof {
            assert(reloc_targets(b@) is Some);
            assert(reloc_targets(b@)->0 == targets@.map_values(|t: usize| t as int));
            assert(targets_ok(reloc_targets(b@)->0, image_size(b@)));
        }
        if delta != 0 {
            let ghost before = mem@;
            apply_relocations(&mut mem, &targets, delta);
            proof {
                lemma_apply_targets_len(before, targets@.map_values(|t: usize| t as int), delta);
            }
        }
        let entry = base + info.entry_rva as u64;
        Ok(Image { mem, base, entry })
    }
}

// ---- Image Loader laws ----

/// Sections are laid out in ascending virtual order, so any two sections'
/// virtual ranges are disjoint.
pub proof fn lemma_sections_ordered(b: Seq<u8>, k1: int, k2: int)
    requires
        loader_wf(b),
        0 <= k1 < k2 < n_sections(b),
    ensures
        sect_va(b, k1) + sect_vsize(b, k1) <= sect_va(b, k2),
    decreases k2 - k1,
{
    if k1 + 1 < k2 {
        lemma_sections_ordered(b, k1 + 1, k2);
    }
}

proof fn lemma_copy_upto_value(b: Seq<u8>, k: int, j: int, m: int)
    requires
        loader_wf(b),
        0 <= k < m <= n_sections(b),
        0 <= j < copy_len(b, k),
    ensures
        copy_upto(b, m)[sect_va(b, k) + j] == b[sect_rptr(b, k) + j],
    decreases m,
{
    lemma_copy_upto_len(b, m - 1);
    lemma_copy_upto_len(b, m);
    assert(section_fits(b, k));
    if m == k + 1 {
        assert(copy_upto(b, m) == splice(copy_upto(b, k), sect_va(b, k), raw_bytes(b, k)));
        assert(raw_bytes(b, k)[j] == b[sect_rptr(b, k) + j]);
    } else {
        lemma_copy_upto_value(b, k, j, m - 1);
        lemma_sections_ordered(b, k, m - 1);
        assert(section_fits(b, m - 1));
        assert(sect_va(b, k) + j < sect_va(b, m - 1));
        assert(copy_upto(b, m)[sect_va(b, k) + j] == copy_upto(b, m - 1)[sect_va(b, k) + j]);
    }
}

/// Image Loader round-trip law, first half: the mapped image reproduces
/// every section's raw bytes exactly at its virtual address.
pub proof fn law_mapped_image_sections(b: Seq<u8>, k: int, j: int)
    requires
        loader_wf(b),
        0 <= k < n_sections(b),
        0 <= j < copy_len(b, k),
    ensures
        mapped_image(b)[sect_va(b, k) + j] == b[sect_rptr(b, k) + j],
{
    lemma_copy_upto_value(b, k, j, n_sections(b));
}

proof fn lemma_copy_upto_zero(b: Seq<u8>, a: int, m: int)
    requires
        loader_wf(b),
        0 <= a < image_size(b),
        0 <= m <= n_sections(b),
        forall|k: int|
            0 <= k < n_sections(b) ==> !(#[trigger] sect_va(b, k) <= a < sect_va(b, k) + copy_len(
                b,
                k,
            )),
    ensures
        copy_upto(b, m)[a] == 0,
    decreases m,
{
    if m > 0 {
        lemma_copy_upto_zero(b, a, m - 1);
        lemma_copy_upto_len(b, m - 1);
        lemma_copy_upto_len(b, m);
        assert(section_fits(b, m - 1));
        assert(!(sect_va(b, m - 1) <= a < sect_va(b, m - 1) + copy_len(b, m - 1)));
        assert(copy_upto(b, m)[a] == copy_upto(b, m - 1)[a]);
    }
}

/// Image Loader round-trip law, second half: bytes no section's raw data
/// covers — uninitialized data among them — are zero in the mapped image.
pub proof fn law_mapped_image_zero(b: Seq<u8>, a: int)
    requires
        loader_wf(b),
        0 <= a < image_size(b),
        forall|k: int|
            0 <= k < n_sections(b) ==> !(#[trigger] sect_va(b, k) <= a < sect_va(b, k) + copy_len(
                b,
                k,
            )),
    ensures
        mapped_image(b)[a] == 0,
{
    lemma_copy_upto_zero(b, a, n_sections(b));
}

/// At the preferred base the loaded image *is* the mapped image: loading
/// and reading back reproduces the raw section bytes unchanged.
pub proof fn law_loaded_mem_at_preferred_base(b: Seq<u8>, base: u64)
    requires
        base as int == image_base(b),
    ensures
        loaded_mem(b, base) == mapped_image(b),
{
    assert(u64_specs::wrapping_sub(base, base) == 0);
}

} // verus!
