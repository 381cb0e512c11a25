//! Model of the PE headers this stub needs: DOS stub, COFF header,
//! optional header, and the section table.  The spec functions say what
//! each field *is* as a function of the raw buffer; the exec parser is
//! proved to agree with them.

use vstd::prelude::*;

use crate::bytes::{le16, le32, read_u16, read_u32};

verus! {

/// The buffer starts with a DOS header ("MZ") long enough to hold the
/// offset of the PE signature at 0x3c.
pub open spec fn dos_ok(b: Seq<u8>) -> bool {
    &&& b.len() >= 0x40
    &&& b[0] == 0x4d
    &&& b[1] == 0x5a
}

/// File offset of the PE signature.
pub open spec fn pe_off(b: Seq<u8>) -> int {
    le32(b, 0x3c)
}

/// "PE\0\0" stands at `pe_off`, with room for the COFF header behind it.
pub open spec fn sig_ok(b: Seq<u8>) -> bool {
    &&& pe_off(b) + 24 <= b.len()
    &&& b[pe_off(b)] == 0x50
    &&& b[pe_off(b) + 1] == 0x45
    &&& b[pe_off(b) + 2] == 0
    &&& b[pe_off(b) + 3] == 0
}

pub open spec fn coff_off(b: Seq<u8>) -> int {
    pe_off(b) + 4
}

pub open spec fn machine(b: Seq<u8>) -> int {
    le16(b, coff_off(b))
}

pub open spec fn n_sections(b: Seq<u8>) -> int {
    le16(b, coff_off(b) + 2)
}

pub open spec fn opt_header_size(b: Seq<u8>) -> int {
    le16(b, coff_off(b) + 16)
}

/// File offset of the optional header.
pub open spec fn opt_off(b: Seq<u8>) -> int {
    coff_off(b) + 20
}

/// File offset of the section table.
pub open spec fn sect_table_off(b: Seq<u8>) -> int {
    opt_off(b) + opt_header_size(b)
}

/// Headers are well-formed far enough to walk the section table.
pub open spec fn headers_wf(b: Seq<u8>) -> bool {
    &&& dos_ok(b)
    &&& sig_ok(b)
    &&& sect_table_off(b) + 40 * n_sections(b) <= b.len()
}

/// File offset of section header `k`.
pub open spec fn sect_off(b: Seq<u8>, k: int) -> int {
    sect_table_off(b) + 40 * k
}

/// The eight raw name bytes of section `k`.
pub open spec fn sect_name_raw(b: Seq<u8>, k: int) -> Seq<u8> {
    b.subrange(sect_off(b, k), sect_off(b, k) + 8)
}

pub open spec fn sect_vsize(b: Seq<u8>, k: int) -> int {
    le32(b, sect_off(b, k) + 8)
}

pub open spec fn sect_va(b: Seq<u8>, k: int) -> int {
    le32(b, sect_off(b, k) + 12)
}

pub open spec fn sect_rsize(b: Seq<u8>, k: int) -> int {
    le32(b, sect_off(b, k) + 16)
}

pub open spec fn sect_rptr(b: Seq<u8>, k: int) -> int {
    le32(b, sect_off(b, k) + 20)
}

/// A stored section name: the eight bytes cut at the first NUL.
pub open spec fn trunc_name(s: Seq<u8>) -> Seq<u8>
    decreases s.len(),
{
    if s.len() == 0 {
        s
    } else if s[0] == 0 {
        Seq::empty()
    } else {
        seq![s[0]] + trunc_name(s.drop_first())
    }
}

pub open spec fn sect_name(b: Seq<u8>, k: int) -> Seq<u8> {
    trunc_name(sect_name_raw(b, k))
}

/// Index of the first section at or after `k` whose stored name is `name`.
pub open spec fn first_match_from(b: Seq<u8>, name: Seq<u8>, k: int) -> Option<int>
    decreases n_sections(b) - k,
{
    if k < 0 || k >= n_sections(b) {
        None::<int>
    } else if sect_name(b, k) == name {
        Some(k)
    } else {
        first_match_from(b, name, k + 1)
    }
}

pub proof fn lemma_trunc_name_props(s: Seq<u8>)
    ensures
        trunc_name(s).len() <= s.len(),
        forall|i: int| 0 <= i < trunc_name(s).len() ==> trunc_name(s)[i] == s[i] && s[i] != 0,
        trunc_name(s).len() < s.len() ==> s[trunc_name(s).len() as int] == 0,
    decreases s.len(),
{
    if s.len() == 0 {
    } else if s[0] == 0 {
    } else {
        lemma_trunc_name_props(s.drop_first());
        assert forall|i: int| 0 <= i < trunc_name(s).len() implies trunc_name(s)[i] == s[i] && s[i]
            != 0 by {
            if i > 0 {
                assert(trunc_name(s)[i] == trunc_name(s.drop_first())[i - 1]);
                assert(s.drop_first()[i - 1] == s[i]);
            }
        }
    }
}

/// `trunc_name(s) == q` holds exactly when `q` is a NUL-free prefix of `s`
/// that either fills `s` or stops right before a NUL.
pub proof fn lemma_trunc_name_eq(s: Seq<u8>, q: Seq<u8>)
    ensures
        trunc_name(s) == q <==> {
            &&& q.len() <= s.len()
            &&& (forall|i: int| 0 <= i < q.len() ==> s[i] == q[i] && q[i] != 0)
            &&& (q.len() < s.len() ==> s[q.len() as int] == 0)
        },
    decreases s.len(),
{
    lemma_trunc_name_props(s);
    if trunc_name(s) == q {
    } else {
        // show the right-hand side fails
        if q.len() <= s.len() && (forall|i: int| 0 <= i < q.len() ==> s[i] == q[i] && q[i] != 0)
            && (q.len() < s.len() ==> s[q.len() as int] == 0) {
            if s.len() == 0 {
                assert(q =~= trunc_name(s));
            } else if s[0] == 0 {
                assert(q.len() == 0);
                assert(q =~= trunc_name(s));
            } else {
                lemma_trunc_name_eq(s.drop_first(), q.drop_first());
                assert(q.len() > 0);
                assert forall|i: int|
                    0 <= i < q.drop_first().len() implies s.drop_first()[i] == q.drop_first()[i]
                    && q.drop_first()[i] != 0 by {
                    assert(s.drop_first()[i] == s[i + 1]);
                    assert(q.drop_first()[i] == q[i + 1]);
                }
                assert(trunc_name(s.drop_first()) == q.drop_first());
                assert(q =~= seq![q[0]] + q.drop_first());
                assert(q =~= trunc_name(s));
            }
        }
    }
}

/// Parsed header positions, all proved equal to the spec-level fields.
pub struct PeHeaders {
    pub coff_off: usize,
    pub opt_off: usize,
    pub n_sections: usize,
    pub opt_header_size: usize,
    pub sect_table_off: usize,
}

/// Parses the DOS header, PE signature and COFF header; returns the section
/// table location exactly when the headers are well-formed.
pub fn parse_headers(b: &[u8]) -> (r: Option<PeHeaders>)
    ensures
        r is Some <==> headers_wf(b@),
        r is Some ==> r->0.coff_off as int == coff_off(b@),
        r is Some ==> r->0.opt_off as int == opt_off(b@),
        r is Some ==> r->0.n_sections as int == n_sections(b@),
        r is Some ==> r->0.opt_header_size as int == opt_header_size(b@),
        r is Some ==> r->0.sect_table_off as int == sect_table_off(b@),
{
    let len = b.len();
    if len < 0x40 {
        return None;
    }
    if b[0] != 0x4d || b[1] != 0x5a {
        return None;
    }
    let pe = read_u32(b, 0x3c) as usize;
    if pe > len - 24 {
        return None;
    }
    if b[pe] != 0x50 || b[pe + 1] != 0x45 || b[pe + 2] != 0 || b[pe + 3] != 0 {
        return None;
    }
    let nsec = read_u16(b, pe + 4 + 2) as usize;
    let optsz = read_u16(b, pe + 4 + 16) as usize;
    // everything from the COFF header on must fit in the buffer
    let avail = len - (pe + 24);
    if optsz + 40 * nsec > avail {
        return None;
    }
    Some(
        PeHeaders {
            coff_off: pe + 4,
            opt_off: pe + 24,
            n_sections: nsec,
            opt_header_size: optsz,
            sect_table_off: pe + 24 + optsz,
        },
    )
}

/// True exactly when the stored name of section `k` is `name`.
#[verifier::loop_isolation(false)]
pub fn section_name_matches(b: &[u8], sect_off_k: usize, name: &[u8]) -> (r: bool)
    requires
        sect_off_k + 8 <= b@.len(),
    ensures
        r == (trunc_name(b@.subrange(sect_off_k as int, sect_off_k as int + 8)) == name@),
{
    let blen = b.len();
    proof {
        lemma_trunc_name_eq(b@.subrange(sect_off_k as int, sect_off_k as int + 8), name@);
        assert(sect_off_k + 8 <= blen);
    }
    let n = name.len();
    if n > 8 {
        return false;
    }
    let mut j: usize = 0;
    while j < n
        invariant
            j <= n <= 8,
            n == name@.len(),
            sect_off_k + 8 <= b@.len(),
            forall|i: int| 0 <= i < j ==> b@[sect_off_k + i] == name@[i] && name@[i] != 0,
        decreases n - j,
    {
        if b[sect_off_k + j] != name[j] || name[j] == 0 {
            proof {
                let s = b@.subrange(sect_off_k as int, sect_off_k as int + 8);
                assert(s[j as int] == b@[sect_off_k + j]);
            }
            return false;
        }
        j += 1;
    }
    if n < 8 {
        if b[sect_off_k + n] != 0 {
            proof {
                let s = b@.subrange(sect_off_k as int, sect_off_k as int + 8);
                assert(s[n as int] == b@[sect_off_k + n]);
            }
            return false;
        }
    }
    proof {
        let s = b@.subrange(sect_off_k as int, sect_off_k as int + 8);
        assert(forall|i: int| 0 <= i < name@.len() ==> s[i] == b@[sect_off_k + i]);
        assert(name@.len() < s.len() ==> s[name@.len() as int] == b@[sect_off_k + name@.len()]);
    }
    true
}

} // verus!
